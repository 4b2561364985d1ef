# typing_game

A typing game for the terminal. A text is drawn from a list of words, the
player types it, and every mistake is counted together with the character
before it, so that the statistics can tell which keys give trouble.

`src/` is the verified library: the word list (`words`), the draw of a text
(`text`), the counts of mistakes and their table (`stats`), the statistics per
key (`key_errors`), the state of the game and its keys (`game`), the score
(`score`), what the screen shows (`screen`), what holds of whole games
(`laws`), and how the table, its queries and the counts agree (`queries`).
`strings` has what these build strings with.

`app/` is the program around it: the terminal, the database, the files and the
floating-point figures.
